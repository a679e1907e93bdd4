//! Session ids, completion ids and creation times.

use vstd::prelude::*;
use crate::outbound::push_str;
use crate::text::{chars_of, starts_with, string_of};

verus! {

/// Relies on `uuid::Uuid::new_v4` shown in its hyphenated form: a fresh
/// random id; nothing is promised of its value.
#[verifier::external_body]
fn random_id() -> String {
    uuid::Uuid::new_v4().to_string()
}

/// Relies on `uuid::Uuid::new_v4` shown in its simple form (hex digits
/// without hyphens): a fresh random id; nothing is promised of its value.
#[verifier::external_body]
fn random_simple_id() -> String {
    uuid::Uuid::new_v4().simple().to_string()
}

/// Relies on `chrono::Utc::now` and `DateTime::timestamp`: the current time
/// in whole seconds since the Unix epoch; nothing is promised of its value.
#[verifier::external_body]
fn unix_seconds() -> i64 {
    chrono::Utc::now().timestamp()
}

/// The session id a request names, or a fresh one where it names none.
pub fn session_id_or_new(header: Option<String>) -> (r: String)
    ensures
        header matches Some(h) ==> r == h,
{
    match header {
        Some(h) => h,
        None => random_id(),
    }
}

/// A fresh completion id: `chatcmpl-` and a random hex id.
pub fn new_completion_id() -> (r: String)
    ensures
        starts_with(r@, "chatcmpl-"@),
{
    let mut v = chars_of("chatcmpl-");
    let ghost lead = v@;
    push_str(&mut v, random_simple_id().as_str());
    assert(v@.subrange(0, lead.len() as int) =~= lead);
    string_of(&v)
}

/// The creation time of a reply: seconds since the Unix epoch.
pub fn created_now() -> (r: i64) {
    unix_seconds()
}

} // verus!
