//! The record that is signed in, and what answers and tokens say about it.
//!
//! The store keeps the record of whoever is signed in. A changed record, a
//! removed record, a confirmed verification or a changed address concern
//! the store only when they are about that very record; the functions here
//! decide whether they are.

use crate::auth_store::jwt_claims_of;
use crate::auth_store::segment_claims;
use crate::auth_store::split_chars;
use crate::auth_store::split_on;
use crate::json::as_bool;
use crate::json::as_i64;
use crate::json::as_object;
use crate::json::bool_value;
use crate::json::is_null;
use crate::json::json_as_bool;
use crate::json::json_as_i64;
use crate::json::json_as_object;
use crate::json::json_bool;
use crate::json::json_is_null;
use crate::json::json_member;
use crate::json::json_object;
use crate::json::member;
use crate::json::null_value;
use crate::json::object_append;
use crate::json::object_insert;
use crate::json::object_value;
use crate::json::string_member;
use crate::json::string_member_of;
use crate::json::string_member_or_empty;
use crate::json::text_or_empty;
use crate::text::chars_of;
use crate::text::string_of;
use serde_json::Value;
use vstd::prelude::*;

verus! {

/// The text of a string member, empty where there is none.
pub open spec fn member_text(v: Value, key: Seq<char>) -> Seq<char> {
    text_or_empty(string_member(v, key))
}

/// Whether the record in the store is the record `record_id` of the
/// collection, which is known by its identifier or by its name.
pub open spec fn is_stored_record(current: Value, collection: Seq<char>, record_id: Seq<char>)
    -> bool {
    &&& !json_is_null(current)
    &&& member_text(current, "id"@) == record_id
    &&& (member_text(current, "collectionId"@) == collection || member_text(
        current,
        "collectionName"@,
    ) == collection)
}

/// Whether the payload of a token is about the record in the store: the
/// same identifier and the same collection.
pub open spec fn token_is_about(current: Value, payload: Value) -> bool {
    &&& !json_is_null(current)
    &&& !json_is_null(payload)
    &&& member_text(current, "id"@) == member_text(payload, "id"@)
    &&& member_text(current, "collectionId"@) == member_text(payload, "collectionId"@)
}

/// Whether the record in the store is marked as verified.
pub open spec fn is_marked_verified(current: Value) -> bool {
    match json_member(current, "verified"@) {
        Some(v) => match json_as_bool(v) {
            Some(b) => b,
            None => false,
        },
        None => false,
    }
}

/// The token and the record of an answer that signs in, where it has both.
pub open spec fn signed_in(data: Value) -> Option<(Seq<char>, Value)> {
    match string_member(data, "token"@) {
        Some(token) => match json_member(data, "record"@) {
            Some(record) => Some((token, record)),
            None => None,
        },
        None => None,
    }
}

/// The number under `count` in an answer, zero where there is none.
pub open spec fn counted(data: Value) -> i64 {
    match json_member(data, "count"@) {
        Some(v) => match json_as_i64(v) {
            Some(n) => n,
            None => 0,
        },
        None => 0,
    }
}

/// The second segment of a token that has at least two.
pub open spec fn token_payload_segment(token: Seq<char>) -> Option<Seq<char>> {
    if split_on(token, '.').len() >= 2 {
        Some(split_on(token, '.')[1])
    } else {
        None
    }
}

/// What the second segment of a token holds, where it can be read.
pub open spec fn token_payload(token: Seq<char>) -> Option<Value> {
    match token_payload_segment(token) {
        Some(segment) => segment_claims(segment),
        None => None,
    }
}

/// Whether the record in the store is the record `record_id` of the collection.
pub fn is_auth_record(current: &Value, collection: &str, record_id: &str) -> (r: bool)
    ensures
        r == is_stored_record(*current, collection@, record_id@),
{
    if is_null(current) {
        return false;
    }
    let same_id = string_member_or_empty(current, "id") == record_id.to_owned();
    let wanted = collection.to_owned();
    let same_collection = string_member_or_empty(current, "collectionId") == wanted
        || string_member_or_empty(current, "collectionName") == wanted;
    same_id && same_collection
}

/// Whether the payload of a token is about the record in the store.
pub fn same_token_record(current: &Value, payload: &Value) -> (r: bool)
    ensures
        r == token_is_about(*current, *payload),
{
    if is_null(current) || is_null(payload) {
        return false;
    }
    string_member_or_empty(current, "id") == string_member_or_empty(payload, "id")
        && string_member_or_empty(current, "collectionId") == string_member_or_empty(
        payload,
        "collectionId",
    )
}

/// Whether a confirmed verification is to be noted in the store: the token
/// is about the record there, and that record is not yet marked.
pub fn marks_verified(current: &Value, payload: &Value) -> (r: bool)
    ensures
        r == (token_is_about(*current, *payload) && !is_marked_verified(*current)),
{
    if !same_token_record(current, payload) {
        return false;
    }
    let marked = match member(current, "verified") {
        Some(v) => match as_bool(v) {
            Some(b) => b,
            None => false,
        },
        None => false,
    };
    !marked
}

/// The token and the record of an answer that signs in, where it has both.
pub fn handle_auth_response(data: &Value) -> (r: Option<(String, Value)>)
    ensures
        match r {
            Some(pair) => signed_in(*data) == Some((pair.0@, pair.1)),
            None => signed_in(*data) is None,
        },
{
    match string_member_of(data, "token") {
        Some(token) => match member(data, "record") {
            Some(record) => Some((token, record.clone())),
            None => None,
        },
        None => None,
    }
}

/// The number under `count` in an answer, zero where there is none.
pub fn count_of(data: &Value) -> (r: i64)
    ensures
        r == counted(*data),
{
    match member(data, "count") {
        Some(v) => match as_i64(v) {
            Some(n) => n,
            None => 0,
        },
        None => 0,
    }
}

/// What the second segment of a token holds; null where the token has no
/// second segment or the segment cannot be read.
pub fn decode_token_payload(token: &str) -> (r: Value)
    ensures
        match token_payload(token@) {
            Some(v) => r == v,
            None => json_is_null(r),
        },
{
    let parts = split_chars(&chars_of(token), '.');
    if parts.len() < 2 {
        return null_value();
    }
    assert(crate::auth_store::piece_views(parts@)[1] == parts@[1]@);
    let segment = string_of(&parts[1]);
    match jwt_claims_of(segment.as_str()) {
        Some(v) => v,
        None => null_value(),
    }
}

/// The expansion of a record after an update: where both the stored and
/// the new expansion are objects, the stored one with the entries of the
/// new one; else the stored one.
pub open spec fn merged_expand(stored: Value, update: Value) -> Value {
    match json_as_object(stored) {
        Some(a) => match json_as_object(update) {
            Some(b) => json_object(a.union_prefer_right(b)),
            None => stored,
        },
        None => stored,
    }
}

/// The entries of the stored record after an update of that record: the
/// entries of the update win over the stored ones, but for the expansion,
/// which is merged where both have one.
pub open spec fn merged_record(current: Value, entries: Map<Seq<char>, Value>, item: Value) -> Map<
    Seq<char>,
    Value,
> {
    let updated = match json_as_object(item) {
        Some(e) => entries.union_prefer_right(e),
        None => entries,
    };
    match json_member(current, "expand"@) {
        Some(stored) => match json_member(item, "expand"@) {
            Some(update) => updated.insert("expand"@, merged_expand(stored, update)),
            None => updated,
        },
        None => updated,
    }
}

/// The record to keep in the store after a record was changed on the
/// server: where the changed record is the stored one, the stored record
/// with the changes; none where it is another record, or where the stored
/// record is not an object.
pub fn maybe_update_auth_record(current: &Value, item: &Value, collection: &str) -> (r: Option<Value>)
    ensures
        match r {
            Some(merged) => is_stored_record(*current, collection@, member_text(*item, "id"@))
                && json_as_object(*current) is Some && merged == json_object(
                merged_record(*current, json_as_object(*current).unwrap(), *item),
            ),
            None => !(is_stored_record(*current, collection@, member_text(*item, "id"@))
                && json_as_object(*current) is Some),
        },
{
    let item_id = string_member_or_empty(item, "id");
    if !is_auth_record(current, collection, item_id.as_str()) {
        return None;
    }
    let mut merged = match as_object(current) {
        Some(m) => m.clone(),
        None => {
            return None;
        },
    };
    match as_object(item) {
        Some(m) => {
            object_append(&mut merged, m.clone());
        },
        None => {},
    }
    match member(current, "expand") {
        Some(stored) => match member(item, "expand") {
            Some(update) => {
                let combined = match as_object(stored) {
                    Some(a) => match as_object(update) {
                        Some(b) => {
                            let mut both = a.clone();
                            object_append(&mut both, b.clone());
                            object_value(both)
                        },
                        None => stored.clone(),
                    },
                    None => stored.clone(),
                };
                object_insert(&mut merged, "expand".to_owned(), combined);
            },
            None => {},
        },
        None => {},
    }
    Some(object_value(merged))
}

/// The stored record marked as verified; none where it is not an object.
pub fn with_verified(current: &Value) -> (r: Option<Value>)
    ensures
        match r {
            Some(v) => json_as_object(*current) is Some && v == json_object(
                json_as_object(*current).unwrap().insert("verified"@, json_bool(true)),
            ),
            None => json_as_object(*current) is None,
        },
{
    match as_object(current) {
        Some(m) => {
            let mut marked = m.clone();
            object_insert(&mut marked, "verified".to_owned(), bool_value(true));
            Some(object_value(marked))
        },
        None => None,
    }
}

} // verus!
