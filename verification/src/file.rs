//! URLs of the files that belong to records.

use crate::client::build_url;
use crate::client::full_url;
use crate::crud::query_with;
use crate::crud::query_with_text;
use crate::crud::set_param;
use crate::crud::set_text_param;
use crate::crud::text_view;
use crate::json::bool_value;
use crate::json::json_bool;
use crate::json::string_member;
use crate::json::string_member_of;
use crate::json::string_member_or_empty;
use crate::json::text_or_empty;
use crate::text::chars_of;
use crate::utils::encode_path_segment;
use crate::utils::query_view;
use crate::utils::url_encoded;
use serde_json::Value;
use vstd::prelude::*;

verus! {

/// The identifier of a record: its string member `id`, else empty.
pub open spec fn record_id(record: Value) -> Seq<char> {
    text_or_empty(string_member(record, "id"@))
}

/// The first text where it is not empty, else the second where there is one.
pub open spec fn or_else(first: Seq<char>, second: Option<Seq<char>>) -> Seq<char> {
    if first.len() > 0 {
        first
    } else {
        match second {
            Some(s) => s,
            None => first,
        }
    }
}

/// The collection of a record: its `collectionName`, else its
/// `@collectionName`, else its `collectionId`, else empty.
pub open spec fn record_collection(record: Value) -> Seq<char> {
    or_else(
        or_else(
            text_or_empty(string_member(record, "collectionName"@)),
            string_member(record, "@collectionName"@),
        ),
        string_member(record, "collectionId"@),
    )
}

/// The path of a file: collection, record and file name, each percent-encoded.
pub open spec fn file_path(collection: Seq<char>, record: Seq<char>, filename: Seq<char>) -> Seq<
    char,
> {
    "/api/files/"@ + url_encoded(collection) + seq!['/'] + url_encoded(record) + seq!['/']
        + url_encoded(filename)
}

/// The query of a file's URL: thumb, token and download where given.
pub open spec fn file_query(
    query: Seq<(Seq<char>, Value)>,
    thumb: Option<Seq<char>>,
    token: Option<Seq<char>>,
    download: Option<bool>,
) -> Seq<(Seq<char>, Value)> {
    let with_token = query_with_text(query_with_text(query, "thumb"@, thumb), "token"@, token);
    match download {
        Some(d) => query_with(with_token, "download"@, json_bool(d)),
        None => with_token,
    }
}

fn or_else_text(first: String, second: Option<String>) -> (r: String)
    ensures
        r@ == or_else(
            first@,
            match second {
                Some(s) => Some(s@),
                None => None,
            },
        ),
{
    if chars_of(first.as_str()).len() > 0 {
        first
    } else {
        match second {
            Some(s) => s,
            None => first,
        }
    }
}

/// The collection that a record names.
pub fn collection_of(record: &Value) -> (r: String)
    ensures
        r@ == record_collection(*record),
{
    let name = string_member_or_empty(record, "collectionName");
    let named = or_else_text(name, string_member_of(record, "@collectionName"));
    or_else_text(named, string_member_of(record, "collectionId"))
}

/// Builds the URL of a file of a record under a base URL.
pub fn get_url(
    base_url: &str,
    record: &Value,
    filename: &str,
    thumb: Option<String>,
    token: Option<String>,
    download: Option<bool>,
    query: Vec<(String, Value)>,
) -> (r: String)
    ensures
        r@ == full_url(
            base_url@,
            file_path(record_collection(*record), record_id(*record), filename@),
            file_query(query_view(query@), text_view(thumb), text_view(token), download),
        ),
{
    let params = set_text_param(query, "thumb", thumb);
    let params = set_text_param(params, "token", token);
    let params = match download {
        Some(d) => set_param(params, "download", bool_value(d)),
        None => params,
    };
    let id = string_member_or_empty(record, "id");
    let collection = collection_of(record);
    let mut path = "/api/files/".to_owned();
    proof {
        reveal_strlit("/");
        assert("/"@ =~= seq!['/']);
    }
    path.append(encode_path_segment(collection.as_str()).as_str());
    path.append("/");
    path.append(encode_path_segment(id.as_str()).as_str());
    path.append("/");
    path.append(encode_path_segment(filename).as_str());
    build_url(base_url, path.as_str(), &params)
}

} // verus!
