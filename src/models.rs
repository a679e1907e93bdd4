//! Conversation turns and the reply records built from them.

use vstd::prelude::*;
use crate::json::{parse_json, get_spec, json_parse, str_spec, Json};
use crate::outbound::push_str;
use crate::text::{chars_of, string_of};

verus! {

/// Who spoke a conversation turn.
#[derive(Clone, Copy, Debug, PartialEq, Eq, Structural)]
pub enum Role {
    System,
    User,
    Assistant,
}

/// The lower-case wire name of a role.
pub open spec fn role_name(r: Role) -> Seq<char> {
    match r {
        Role::System => "system"@,
        Role::User => "user"@,
        Role::Assistant => "assistant"@,
    }
}

impl Role {
    /// The lower-case wire name of the role.
    pub fn as_str(&self) -> (r: &'static str)
        ensures
            r@ == role_name(*self),
    {
        match self {
            Role::System => "system",
            Role::User => "user",
            Role::Assistant => "assistant",
        }
    }

    /// The role's wire name as an owned string.
    pub fn to_string(&self) -> (r: String)
        ensures
            r@ == role_name(*self),
    {
        self.as_str().to_owned()
    }
}

/// One conversation turn; its content is always plain text.
#[derive(Debug, PartialEq)]
pub struct Message {
    pub role: Role,
    pub content: String,
}

impl Clone for Message {
    fn clone(&self) -> (r: Self)
        ensures
            r == *self,
    {
        Message { role: self.role, content: self.content.clone() }
    }
}

impl Message {
    pub fn new(role: Role, content: String) -> (r: Message)
        ensures
            r.role == role,
            r.content == content,
    {
        Message { role, content }
    }
}

/// A copy of a sequence of turns, turn for turn.
pub fn copy_turns(v: &Vec<Message>) -> (r: Vec<Message>)
    ensures
        r@ == v@,
{
    let mut r: Vec<Message> = Vec::new();
    let mut i: usize = 0;
    while i < v.len()
        invariant
            i <= v@.len(),
            r@ == v@.subrange(0, i as int),
        decreases v@.len() - i,
    {
        r.push(v[i].clone());
        assert(r@ =~= v@.subrange(0, i + 1));
        i = i + 1;
    }
    assert(r@ =~= v@);
    r
}

/// Token accounting of a buffered reply.
#[derive(Clone, Copy, Debug, PartialEq, Eq)]
pub struct Usage {
    pub prompt_tokens: i32,
    pub completion_tokens: i32,
    pub total_tokens: i32,
}

/// One choice of a buffered reply.
#[derive(Clone, Debug, PartialEq)]
pub struct ChatCompletion {
    pub index: i32,
    pub message: Message,
    pub finish_reason: String,
}

/// A buffered chat-completion reply.
#[derive(Clone, Debug, PartialEq)]
pub struct ChatCompletionResponse {
    pub id: String,
    pub object: String,
    pub created: i64,
    pub model: String,
    pub choices: Vec<ChatCompletion>,
    pub usage: Usage,
}

/// A bare list of turns.
#[derive(Clone, Debug, PartialEq)]
pub struct Chat {
    pub messages: Vec<Message>,
}

/// A record to be processed.
#[derive(Clone, Debug, PartialEq)]
pub struct DataType {
    pub id: String,
    pub value: String,
}

/// The outcome of processing a record.
#[derive(Clone, Debug, PartialEq)]
pub struct ProcessResult {
    pub success: bool,
    pub message: String,
}

/// Names what `format!("{:?}", s)` yields for a text: the text quoted and
/// escaped as Rust's `Debug` shows a `str`.
pub uninterp spec fn debug_text(s: Seq<char>) -> Seq<char>;

/// Relies on `<str as Debug>::fmt`: the quoted form depends on the text alone.
#[verifier::external_body]
fn debug_quoted(s: &str) -> (r: String)
    ensures
        r@ == debug_text(s@),
{
    format!("{:?}", s)
}

/// How a record shows in a processing report.
pub open spec fn data_debug(d: DataType) -> Seq<char> {
    "DataType { id: "@ + debug_text(d.id@) + ", value: "@ + debug_text(d.value@) + " }"@
}

/// Processes a record: always succeeds, reporting the record.
pub fn process_data(data: DataType) -> (r: ProcessResult)
    ensures
        r.success,
        r.message@ == "Processed data: "@ + data_debug(data),
{
    let mut v = chars_of("Processed data: ");
    push_str(&mut v, "DataType { id: ");
    push_str(&mut v, debug_quoted(data.id.as_str()).as_str());
    push_str(&mut v, ", value: ");
    push_str(&mut v, debug_quoted(data.value.as_str()).as_str());
    push_str(&mut v, " }");
    assert(v@ =~= "Processed data: "@ + data_debug(data));
    ProcessResult { success: true, message: string_of(&v) }
}

/// An error message for display.
pub fn format_error(error: &str) -> (r: String)
    ensures
        r@ == "Error: "@ + error@,
{
    let mut v = chars_of("Error: ");
    push_str(&mut v, error);
    string_of(&v)
}

/// Why a message's content could not be read as text.
#[derive(Clone, Copy, Debug, PartialEq, Eq, Structural)]
pub enum ContentError {
    /// The content is not JSON.
    NotJson,
    /// The content is neither a string nor an array.
    NotTextOrArray,
    /// An array element is neither a string nor an object.
    UnexpectedElement,
    /// An object element has no `text` member.
    MissingText,
    /// An object element's `text` member is not a string.
    TextNotString,
    /// An object element's `type` names a part other than text.
    NonTextPart,
}

impl ContentError {
    /// The reason, in words.
    pub fn describe(&self) -> (r: &'static str) {
        match self {
            ContentError::NotJson => "Expected JSON for message content",
            ContentError::NotTextOrArray => "Expected string or array for message content",
            ContentError::UnexpectedElement => "Unexpected element type in content array",
            ContentError::MissingText => "Expected object to contain 'text' field",
            ContentError::TextNotString => "Expected 'text' field as string in object",
            ContentError::NonTextPart => "Unsupported content part type",
        }
    }
}

/// The text member of an object part.
pub open spec fn text_member(e: Json) -> Result<Seq<char>, ContentError> {
    match get_spec(e, "text"@) {
        Some(Json::Str(t)) => Ok(t@),
        Some(_) => Err(ContentError::TextNotString),
        None => Err(ContentError::MissingText),
    }
}

/// The text of one content part: a string, or an object whose `type`, where
/// present, is `"text"`, by its `text` member.
pub open spec fn part_text(e: Json) -> Result<Seq<char>, ContentError> {
    match e {
        Json::Str(s) => Ok(s@),
        Json::Object(_) => match get_spec(e, "type"@) {
            Some(ty) => if str_spec(Some(ty)) == Some("text"@) {
                text_member(e)
            } else {
                Err(ContentError::NonTextPart)
            },
            None => text_member(e),
        },
        _ => Err(ContentError::UnexpectedElement),
    }
}

/// The texts of content parts joined by single spaces; the first part that
/// is not text decides the error.
pub open spec fn parts_text(parts: Seq<Json>) -> Result<Seq<char>, ContentError>
    decreases parts.len(),
{
    if parts.len() == 0 {
        Ok(Seq::empty())
    } else {
        match parts_text(parts.drop_last()) {
            Err(e) => Err(e),
            Ok(pre) => match part_text(parts.last()) {
                Err(e) => Err(e),
                Ok(t) => Ok(if parts.len() == 1 {
                    t
                } else {
                    pre + " "@ + t
                }),
            },
        }
    }
}

/// The plain text of a message's content: a string as it is, an array of
/// strings and `{text}` objects joined by single spaces.
pub open spec fn content_spec(v: Json) -> Result<Seq<char>, ContentError> {
    match v {
        Json::Str(s) => Ok(s@),
        Json::Array(a) => parts_text(a@),
        _ => Err(ContentError::NotTextOrArray),
    }
}

fn part_of(e: &Json) -> (r: Result<&str, ContentError>)
    ensures
        match r {
            Ok(t) => part_text(*e) == Ok::<Seq<char>, ContentError>(t@),
            Err(x) => part_text(*e) == Err::<Seq<char>, ContentError>(x),
        },
{
    match e {
        Json::Str(s) => Ok(s.as_str()),
        Json::Object(_) => {
            match e.get("type") {
                Some(ty) => {
                    let is_text = match ty.as_str() {
                        Some(s) => crate::json::same_text(s, "text"),
                        None => false,
                    };
                    if !is_text {
                        return Err(ContentError::NonTextPart);
                    }
                },
                None => {},
            }
            match e.get("text") {
                Some(t) => match t.as_str() {
                    Some(x) => Ok(x),
                    None => Err(ContentError::TextNotString),
                },
                None => Err(ContentError::MissingText),
            }
        },
        _ => Err(ContentError::UnexpectedElement),
    }
}

/// The plain text of a message's content.
pub fn message_content(v: &Json) -> (r: Result<String, ContentError>)
    ensures
        match r {
            Ok(s) => content_spec(*v) == Ok::<Seq<char>, ContentError>(s@),
            Err(e) => content_spec(*v) == Err::<Seq<char>, ContentError>(e),
        },
{
    match v {
        Json::Str(s) => Ok(s.clone()),
        Json::Array(a) => {
            let mut out: Vec<char> = Vec::new();
            let mut i: usize = 0;
            assert(content_spec(*v) == parts_text(a@));
            assert(a@.subrange(0, 0) =~= Seq::<Json>::empty());
            while i < a.len()
                invariant
                    i <= a@.len(),
                    content_spec(*v) == parts_text(a@),
                    parts_text(a@.subrange(0, i as int)) == Ok::<Seq<char>, ContentError>(out@),
                decreases a@.len() - i,
            {
                assert(a@.subrange(0, i + 1).drop_last() =~= a@.subrange(0, i as int));
                assert(a@.subrange(0, i + 1).last() == a@[i as int]);
                match part_of(&a[i]) {
                    Ok(t) => {
                        if i > 0 {
                            push_str(&mut out, " ");
                        }
                        push_str(&mut out, t);
                    },
                    Err(e) => {
                        proof {
                            assert(parts_text(a@.subrange(0, i + 1)) == Err::<Seq<char>, ContentError>(e));
                            lemma_parts_error_sticks(a@, i as int + 1);
                            assert(content_spec(*v) == parts_text(a@));
                        }
                        return Err(e);
                    },
                }
                i = i + 1;
            }
            assert(a@.subrange(0, a@.len() as int) =~= a@);
            Ok(string_of(&out))
        },
        _ => Err(ContentError::NotTextOrArray),
    }
}

proof fn lemma_parts_error_sticks(a: Seq<Json>, k: int)
    requires
        1 <= k <= a.len(),
        parts_text(a.subrange(0, k)) is Err,
    ensures
        parts_text(a) == parts_text(a.subrange(0, k)),
    decreases a.len() - k,
{
    if k < a.len() {
        assert(a.subrange(0, k + 1).drop_last() =~= a.subrange(0, k));
        lemma_parts_error_sticks(a, k + 1);
    } else {
        assert(a.subrange(0, k) =~= a);
    }
}

/// The plain text of a message's content given as JSON text.
pub fn message_content_text(raw: &str) -> (r: Result<String, ContentError>)
    ensures
        match json_parse(raw@) {
            Some(v) => match r {
                Ok(s) => content_spec(v) == Ok::<Seq<char>, ContentError>(s@),
                Err(e) => content_spec(v) == Err::<Seq<char>, ContentError>(e),
            },
            None => r == Err::<String, ContentError>(ContentError::NotJson),
        },
{
    match parse_json(raw) {
        Some(v) => message_content(&v),
        None => Err(ContentError::NotJson),
    }
}

} // verus!
