//! What a request carries besides its path.

use crate::errors::ClientResponseError;
use crate::errors::message_body;
use crate::errors::message_value;
use crate::json::is_null;
use crate::json::json_is_null;
use crate::json::json_parsed_bytes;
use crate::json::json_string;
use crate::json::null_value;
use crate::json::parse_bytes;
use crate::json::string_value;
use core::time::Duration;
use serde_json::Value;
use vstd::prelude::*;
use vstd::utf8::*;

verus! {

/// One file of a multipart request.
#[derive(Debug, Clone)]
pub struct FileAttachment {
    pub field: String,
    pub filename: String,
    pub content_type: String,
    pub data: Vec<u8>,
}

impl FileAttachment {
    /// A file for the given form field, with the generic binary content type.
    pub fn new(field: String, filename: String, data: Vec<u8>) -> (r: Self)
        ensures
            r.field == field,
            r.filename == filename,
            r.content_type@ == "application/octet-stream"@,
            r.data == data,
    {
        FileAttachment {
            field,
            filename,
            content_type: "application/octet-stream".to_owned(),
            data,
        }
    }
}

/// The options of one request: method, headers, query parameters, JSON
/// body, files and an optional timeout.
#[derive(Debug, Clone)]
pub struct SendOptions {
    pub method: String,
    pub headers: Vec<(String, String)>,
    pub query: Vec<(String, Value)>,
    pub body: Value,
    pub files: Vec<FileAttachment>,
    pub timeout: Option<Duration>,
}

impl Default for SendOptions {
    /// A `GET` request with nothing attached and a null body.
    fn default() -> (r: Self)
        ensures
            r.method@ == "GET"@,
            r.headers@.len() == 0,
            r.query@.len() == 0,
            json_is_null(r.body),
            r.files@.len() == 0,
            r.timeout is None,
    {
        SendOptions {
            method: "GET".to_owned(),
            headers: Vec::new(),
            query: Vec::new(),
            body: null_value(),
            files: Vec::new(),
            timeout: None,
        }
    }
}

/// Whether some header of the list has the name.
pub open spec fn has_header(headers: Seq<(Seq<char>, Seq<char>)>, name: Seq<char>) -> bool {
    exists|i: int| 0 <= i < headers.len() && (#[trigger] headers[i]).0 == name
}

/// The headers with one header set: whatever stood under the name is gone,
/// and the new header stands last.
pub open spec fn header_set(
    headers: Seq<(Seq<char>, Seq<char>)>,
    name: Seq<char>,
    value: Seq<char>,
) -> Seq<(Seq<char>, Seq<char>)> {
    headers.filter(|p: (Seq<char>, Seq<char>)| p.0 != name).push((name, value))
}

/// The headers with each header of a second list set, in order.
pub open spec fn headers_merged(
    headers: Seq<(Seq<char>, Seq<char>)>,
    extra: Seq<(Seq<char>, Seq<char>)>,
) -> Seq<(Seq<char>, Seq<char>)>
    decreases extra.len(),
{
    if extra.len() == 0 {
        headers
    } else {
        header_set(headers_merged(headers, extra.drop_last()), extra.last().0, extra.last().1)
    }
}

/// The headers of a request: language and client, then the headers of the
/// options, which win over these, then the token under `Authorization`
/// where a token is given and the options did not set that header.
pub open spec fn request_headers(
    lang: Seq<char>,
    agent: Seq<char>,
    extra: Seq<(Seq<char>, Seq<char>)>,
    token: Option<Seq<char>>,
) -> Seq<(Seq<char>, Seq<char>)> {
    let merged = headers_merged(seq![("Accept-Language"@, lang), ("User-Agent"@, agent)], extra);
    match token {
        Some(t) => if has_header(merged, "Authorization"@) {
            merged
        } else {
            merged.push(("Authorization"@, t))
        },
        None => merged,
    }
}

/// Sets a header: whatever stood under the name goes, and the new header
/// stands last.
pub fn set_header(headers: Vec<(String, String)>, name: &str, value: String) -> (r: Vec<(String, String)>)
    ensures
        r.deep_view() == header_set(headers.deep_view(), name@, value@),
{
    let mut rest = headers;
    let mut out: Vec<(String, String)> = Vec::new();
    let ghost orig = rest.deep_view();
    let total = rest.len();
    let mut done: usize = 0;
    let wanted = name.to_owned();
    let ghost keep = |p: (Seq<char>, Seq<char>)| p.0 != name@;
    proof {
        assert(orig.take(0) =~= Seq::empty());
        assert(out.deep_view() =~= Seq::empty());
    }
    while rest.len() > 0
        invariant
            done + rest@.len() == orig.len(),
            orig.len() == total,
            wanted@ == name@,
            keep == |p: (Seq<char>, Seq<char>)| p.0 != name@,
            rest.deep_view() == orig.skip(done as int),
            out.deep_view() == orig.take(done as int).filter(keep),
        decreases rest@.len(),
    {
        let ghost before = out.deep_view();
        let ghost rest_before = rest.deep_view();
        let pair = rest.remove(0);
        proof {
            let next = orig.take(done as int + 1);
            assert(next.drop_last() =~= orig.take(done as int));
            assert(rest_before[0] == orig[done as int]);
            assert(next.last() == (pair.0@, pair.1@));
            assert(rest.deep_view() =~= orig.skip(done as int + 1)) by {
                assert forall|j: int| 0 <= j < rest@.len() implies rest.deep_view()[j]
                    == orig.skip(done as int + 1)[j] by {
                    assert(rest.deep_view()[j] == rest_before[j + 1]);
                }
            }
            reveal(Seq::filter);
        }
        if pair.0 != wanted {
            let ghost kept = (pair.0@, pair.1@);
            out.push(pair);
            proof {
                assert(out.deep_view() =~= before.push(kept));
            }
        }
        done += 1;
    }
    proof {
        assert(orig.take(orig.len() as int) =~= orig);
    }
    let ghost filtered = out.deep_view();
    out.push((wanted, value));
    proof {
        assert(out.deep_view() =~= filtered.push((name@, value@)));
    }
    out
}

/// Whether some header of the list has the name.
pub fn contains_header(headers: &Vec<(String, String)>, name: &str) -> (r: bool)
    ensures
        r == has_header(headers.deep_view(), name@),
{
    let wanted = name.to_owned();
    let mut i: usize = 0;
    while i < headers.len()
        invariant
            i <= headers.len(),
            wanted@ == name@,
            forall|j: int| 0 <= j < i ==> (#[trigger] headers.deep_view()[j]).0 != name@,
        decreases headers.len() - i,
    {
        if headers[i].0 == wanted {
            assert(headers.deep_view()[i as int].0 == name@);
            return true;
        }
        i += 1;
    }
    false
}

/// Builds the headers of a request. The token is to be given where the
/// identity provider reports a valid one.
pub fn build_headers(
    lang: &str,
    agent: &str,
    extra: &Vec<(String, String)>,
    token: Option<String>,
) -> (r: Vec<(String, String)>)
    ensures
        r.deep_view() == request_headers(
            lang@,
            agent@,
            extra.deep_view(),
            match token {
                Some(t) => Some(t@),
                None => None,
            },
        ),
{
    let mut headers: Vec<(String, String)> = Vec::new();
    headers.push(("Accept-Language".to_owned(), lang.to_owned()));
    headers.push(("User-Agent".to_owned(), agent.to_owned()));
    let ghost base = seq![("Accept-Language"@, lang@), ("User-Agent"@, agent@)];
    proof {
        assert(headers.deep_view() =~= base);
        assert(extra.deep_view().take(0) =~= Seq::empty());
    }
    let mut i: usize = 0;
    while i < extra.len()
        invariant
            i <= extra.len(),
            headers.deep_view() == headers_merged(base, extra.deep_view().take(i as int)),
        decreases extra.len() - i,
    {
        proof {
            let next = extra.deep_view().take(i as int + 1);
            assert(next.drop_last() =~= extra.deep_view().take(i as int));
            assert(next.last() == (extra@[i as int].0@, extra@[i as int].1@));
        }
        headers = set_header(headers, extra[i].0.as_str(), extra[i].1.clone());
        i += 1;
    }
    proof {
        assert(extra.deep_view().take(extra.len() as int) =~= extra.deep_view());
    }
    match token {
        Some(t) => {
            if !contains_header(&headers, "Authorization") {
                let ghost merged = headers.deep_view();
                headers.push(("Authorization".to_owned(), t));
                proof {
                    assert(headers.deep_view() =~= merged.push(("Authorization"@, t@)));
                }
            }
        },
        None => {},
    }
    headers
}

/// Whether a status reports a failure: a client error or a server error.
pub fn is_failure_status(status: u16) -> (r: bool)
    ensures
        r == (400 <= status < 600),
{
    400 <= status && status < 600
}

/// The error for a request that got no answer: status zero, the cause as
/// message and as underlying error, given up where the time ran out.
pub fn transport_error(url: String, cause: String, timed_out: bool) -> (e: ClientResponseError)
    ensures
        e.url == url,
        e.status == 0,
        e.response == message_body(cause@),
        e.is_abort == timed_out,
        e.original_error == Some(cause),
{
    let body = message_value(cause.as_str());
    ClientResponseError::new(url, 0, body, timed_out, Some(cause))
}

/// The error for an answer whose status reports a failure: the status and
/// the answer's data.
pub fn status_error(url: String, status: u16, data: Value) -> (e: ClientResponseError)
    ensures
        e.url == url,
        e.status == status,
        e.response == data,
        !e.is_abort,
        e.original_error is None,
{
    ClientResponseError::new(url, status, data, false, None)
}

/// How the body of a request travels.
#[derive(Debug, Clone, Copy, PartialEq, Eq)]
pub enum BodyKind {
    /// As a multipart form that carries the files.
    Multipart,
    /// As JSON.
    Json,
    /// There is no body.
    Empty,
}

/// How the body of a request travels: as a form where files are attached;
/// else as JSON where the body is not null; else not at all.
pub open spec fn body_kind_of(options: SendOptions) -> BodyKind {
    if options.files@.len() > 0 {
        BodyKind::Multipart
    } else if !json_is_null(options.body) {
        BodyKind::Json
    } else {
        BodyKind::Empty
    }
}

/// Decides how the body of a request travels. A JSON body is attached
/// exactly when the body is not null and no file is attached.
pub fn body_kind(options: &SendOptions) -> (r: BodyKind)
    ensures
        r == body_kind_of(*options),
        r is Json <==> !json_is_null(options.body) && options.files@.len() == 0,
{
    if options.files.len() > 0 {
        BodyKind::Multipart
    } else if !is_null(&options.body) {
        BodyKind::Json
    } else {
        BodyKind::Empty
    }
}

/// The text that `String::from_utf8_lossy` makes of bytes.
pub uninterp spec fn utf8_lossy(bytes: Seq<u8>) -> Seq<char>;

/// Calls `String::from_utf8_lossy`. The result is the text of the bytes,
/// with a replacement character for what is not UTF-8; bytes that are
/// UTF-8 give the text they encode.
#[verifier::external_body]
fn lossy_text(bytes: &Vec<u8>) -> (r: String)
    ensures
        r@ == utf8_lossy(bytes@),
        valid_utf8(bytes@) ==> r@ == decode_utf8(bytes@),
{
    String::from_utf8_lossy(bytes).into_owned()
}

/// The data of an answer, given what the JSON parser made of its bytes and
/// the text of the bytes: the value parsed, or the text as a JSON string.
pub open spec fn answer_data(parsed: Option<Value>, text: Seq<char>) -> Value {
    match parsed {
        Some(v) => v,
        None => json_string(text),
    }
}

/// The data of an answer with the given bytes: the JSON value they hold,
/// or, where they are not JSON, their text as a JSON string.
pub open spec fn response_data(bytes: Seq<u8>) -> Value {
    answer_data(json_parsed_bytes(bytes), utf8_lossy(bytes))
}

/// The data of an answer, given what the JSON parser made of its bytes and
/// the text of the bytes.
pub fn data_from(parsed: Option<Value>, text: String) -> (r: Value)
    ensures
        r == answer_data(parsed, text@),
{
    match parsed {
        Some(v) => v,
        None => string_value(text),
    }
}

/// The data of an answer with the given bytes.
pub fn response_value(bytes: &Vec<u8>) -> (r: Value)
    ensures
        r == response_data(bytes@),
{
    data_from(parse_bytes(bytes), lossy_text(bytes))
}

/// What an answer means for the caller, given its status and the data of
/// its body: an error exactly for a status from 400 to 599, with that
/// status and the data, not given up and without a cause; else the data.
pub fn answer_from(url: String, status: u16, data: Value) -> (r: Result<Value, ClientResponseError>)
    ensures
        r is Err <==> 400 <= status < 600,
        r is Err ==> r->Err_0.url == url && r->Err_0.status == status && r->Err_0.response == data
            && !r->Err_0.is_abort && r->Err_0.original_error is None,
        r is Ok ==> r->Ok_0 == data,
{
    if is_failure_status(status) {
        Err(status_error(url, status, data))
    } else {
        Ok(data)
    }
}

/// What an answer means for the caller, given its status and the bytes of
/// its body: the bytes are read as JSON, or as text where they are no
/// JSON; then as `answer_from` has it.
pub fn answer(url: String, status: u16, bytes: &Vec<u8>) -> (r: Result<Value, ClientResponseError>)
    ensures
        r is Err <==> 400 <= status < 600,
        r is Err ==> r->Err_0.url == url && r->Err_0.status == status && r->Err_0.response
            == response_data(bytes@) && !r->Err_0.is_abort && r->Err_0.original_error is None,
        r is Ok ==> r->Ok_0 == response_data(bytes@),
{
    answer_from(url, status, response_value(bytes))
}

} // verus!
