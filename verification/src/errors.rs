//! The error that every fallible call of the client reports.

use crate::json::json_object;
use crate::json::json_string;
use crate::json::new_object;
use crate::json::no_entries;
use crate::json::object_insert;
use crate::json::object_value;
use crate::json::string_value;
use serde_json::Value;
use vstd::prelude::*;

verus! {

/// A failed request in normalized form: the URL asked for, the HTTP status
/// (zero where no response arrived), the response body, whether the request
/// was given up, and the underlying error's text where there is one.
#[derive(Debug, Clone)]
pub struct ClientResponseError {
    pub url: String,
    pub status: u16,
    pub response: Value,
    pub is_abort: bool,
    pub original_error: Option<String>,
}

impl ClientResponseError {
    /// An error with exactly the given parts.
    pub fn new(
        url: String,
        status: u16,
        response: Value,
        is_abort: bool,
        original_error: Option<String>,
    ) -> (r: Self)
        ensures
            r.url == url,
            r.status == status,
            r.response == response,
            r.is_abort == is_abort,
            r.original_error == original_error,
    {
        ClientResponseError { url, status, response, is_abort, original_error }
    }
}

/// The JSON object with the one entry `message`.
pub open spec fn message_body(text: Seq<char>) -> Value {
    json_object(no_entries().insert("message"@, json_string(text)))
}

/// Builds the JSON object with the one entry `message`.
pub fn message_value(text: &str) -> (r: Value)
    ensures
        r == message_body(text@),
{
    let mut body = new_object();
    object_insert(&mut body, "message".to_owned(), string_value(text.to_owned()));
    object_value(body)
}

/// Whether an error is the one a caller gets for an empty topic: status
/// 400, the message `topic must be set`, nothing else.
pub open spec fn is_topic_error(e: ClientResponseError) -> bool {
    &&& e.url@.len() == 0
    &&& e.status == 400
    &&& e.response == message_body("topic must be set"@)
    &&& !e.is_abort
    &&& e.original_error is None
}

/// The error for an empty topic.
pub fn topic_error() -> (e: ClientResponseError)
    ensures
        is_topic_error(e),
{
    ClientResponseError::new(String::new(), 400, message_value("topic must be set"), false, None)
}

/// Whether an error is the one for a connection that was not established
/// in time: status zero, marked as given up.
pub open spec fn is_timeout_error(e: ClientResponseError) -> bool {
    &&& e.url@.len() == 0
    &&& e.status == 0
    &&& e.response == message_body("Realtime connection not established"@)
    &&& e.is_abort
    &&& e.original_error is None
}

} // verus!
