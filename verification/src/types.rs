//! Request payloads that are built from optional parts.

use crate::json::bool_value;
use crate::json::integer_value;
use crate::json::json_bool;
use crate::json::json_integer;
use crate::json::json_object;
use crate::json::json_string;
use crate::json::new_object;
use crate::json::no_entries;
use crate::json::object_insert;
use crate::json::object_value;
use crate::json::string_value;
use crate::key::header_values;
use crate::key::headers_object;
use crate::key::pairs_map;
use serde_json::Value;
use vstd::prelude::*;

verus! {

/// The entries with one more string entry, where the string is given.
pub open spec fn with_text(
    entries: Map<Seq<char>, Value>,
    key: Seq<char>,
    text: Option<Seq<char>>,
) -> Map<Seq<char>, Value> {
    match text {
        Some(t) => entries.insert(key, json_string(t)),
        None => entries,
    }
}

/// The entries with one more entry, where the value is given.
pub open spec fn with_value(
    entries: Map<Seq<char>, Value>,
    key: Seq<char>,
    value: Option<Value>,
) -> Map<Seq<char>, Value> {
    match value {
        Some(v) => entries.insert(key, v),
        None => entries,
    }
}

/// An optional string as characters.
pub open spec fn text_of(s: Option<String>) -> Option<Seq<char>> {
    match s {
        Some(t) => Some(t@),
        None => None,
    }
}

fn insert_text(m: &mut serde_json::Map<String, Value>, key: &str, text: &Option<String>)
    ensures
        crate::json::object_entries(*final(m)) == with_text(
            crate::json::object_entries(*old(m)),
            key@,
            text_of(*text),
        ),
{
    match text {
        Some(t) => {
            object_insert(m, key.to_owned(), string_value(t.clone()));
        },
        None => {},
    }
}

fn insert_value(m: &mut serde_json::Map<String, Value>, key: &str, value: &Option<Value>)
    ensures
        crate::json::object_entries(*final(m)) == with_value(
            crate::json::object_entries(*old(m)),
            key@,
            *value,
        ),
{
    match value {
        Some(v) => {
            object_insert(m, key.to_owned(), v.clone());
        },
        None => {},
    }
}

/// An optional integer as a JSON number.
pub open spec fn integer_of(n: Option<i32>) -> Option<Value> {
    match n {
        Some(i) => Some(json_integer(i as i64)),
        None => None,
    }
}

/// An optional truth value as a JSON value.
pub open spec fn bool_of(b: Option<bool>) -> Option<Value> {
    match b {
        Some(x) => Some(json_bool(x)),
        None => None,
    }
}

fn insert_integer(m: &mut serde_json::Map<String, Value>, key: &str, n: Option<i32>)
    ensures
        crate::json::object_entries(*final(m)) == with_value(
            crate::json::object_entries(*old(m)),
            key@,
            integer_of(n),
        ),
{
    match n {
        Some(i) => {
            object_insert(m, key.to_owned(), integer_value(i as i64));
        },
        None => {},
    }
}

fn insert_bool(m: &mut serde_json::Map<String, Value>, key: &str, b: Option<bool>)
    ensures
        crate::json::object_entries(*final(m)) == with_value(
            crate::json::object_entries(*old(m)),
            key@,
            bool_of(b),
        ),
{
    match b {
        Some(x) => {
            object_insert(m, key.to_owned(), bool_value(x));
        },
        None => {},
    }
}

/// Which model a request is to use.
#[derive(Debug, Clone, Default)]
pub struct LangChaingoModelConfig {
    pub provider: Option<String>,
    pub model: Option<String>,
    pub api_key: Option<String>,
    pub base_url: Option<String>,
}

impl LangChaingoModelConfig {
    /// The entries of the JSON form: each part that is given, under its name.
    pub open spec fn entries(&self) -> Map<Seq<char>, Value> {
        with_text(
            with_text(
                with_text(
                    with_text(no_entries(), "provider"@, text_of(self.provider)),
                    "model"@,
                    text_of(self.model),
                ),
                "apiKey"@,
                text_of(self.api_key),
            ),
            "baseUrl"@,
            text_of(self.base_url),
        )
    }

    /// The JSON form: an object with the parts that are given.
    pub fn to_json(&self) -> (r: Value)
        ensures
            r == json_object(self.entries()),
    {
        let mut payload = new_object();
        insert_text(&mut payload, "provider", &self.provider);
        insert_text(&mut payload, "model", &self.model);
        insert_text(&mut payload, "apiKey", &self.api_key);
        insert_text(&mut payload, "baseUrl", &self.base_url);
        object_value(payload)
    }
}

/// One message of a completion request.
#[derive(Debug, Clone, Default)]
pub struct LangChaingoCompletionMessage {
    pub content: String,
    pub role: Option<String>,
}

impl LangChaingoCompletionMessage {
    /// The entries of the JSON form: the content, and the role where given.
    pub open spec fn entries(&self) -> Map<Seq<char>, Value> {
        with_text(
            no_entries().insert("content"@, json_string(self.content@)),
            "role"@,
            text_of(self.role),
        )
    }

    /// The JSON form: an object with the content, and the role where given.
    pub fn to_json(&self) -> (r: Value)
        ensures
            r == json_object(self.entries()),
    {
        let mut payload = new_object();
        object_insert(&mut payload, "content".to_owned(), string_value(self.content.clone()));
        insert_text(&mut payload, "role", &self.role);
        object_value(payload)
    }
}

/// An optional list of pairs as the JSON object of its map.
pub open spec fn pairs_object(pairs: Option<Vec<(String, String)>>) -> Option<Value> {
    match pairs {
        Some(p) => Some(json_object(header_values(pairs_map(p.deep_view())))),
        None => None,
    }
}

/// The filters of a retrieval request: conditions on the metadata and on
/// the documents, each a list of pairs in which a later pair replaces an
/// earlier one with the same key.
#[derive(Debug, Clone, Default)]
pub struct LangChaingoRAGFilters {
    pub where_: Option<Vec<(String, String)>>,
    pub where_document: Option<Vec<(String, String)>>,
}

impl LangChaingoRAGFilters {
    /// The entries of the JSON form: each filter that is given, as an object.
    pub open spec fn entries(&self) -> Map<Seq<char>, Value> {
        with_value(
            with_value(no_entries(), "where"@, pairs_object(self.where_)),
            "whereDocument"@,
            pairs_object(self.where_document),
        )
    }

    /// The JSON form: an object with the filters that are given.
    pub fn to_json(&self) -> (r: Value)
        ensures
            r == json_object(self.entries()),
    {
        let mut payload = new_object();
        match &self.where_ {
            Some(pairs) => {
                object_insert(&mut payload, "where".to_owned(), object_value(headers_object(pairs)));
            },
            None => {},
        }
        match &self.where_document {
            Some(pairs) => {
                object_insert(
                    &mut payload,
                    "whereDocument".to_owned(),
                    object_value(headers_object(pairs)),
                );
            },
            None => {},
        }
        object_value(payload)
    }
}

/// A document of a collection.
#[derive(Debug, Clone)]
pub struct LLMDocument {
    pub id: String,
    pub content: String,
    pub metadata: Option<Value>,
}

impl LLMDocument {
    /// The entries of the JSON form: identifier and content, and the
    /// metadata where given.
    pub open spec fn entries(&self) -> Map<Seq<char>, Value> {
        with_value(
            no_entries().insert("id"@, json_string(self.id@)).insert(
                "content"@,
                json_string(self.content@),
            ),
            "metadata"@,
            self.metadata,
        )
    }

    /// The JSON form: an object with identifier and content, and the
    /// metadata where given.
    pub fn to_json(&self) -> (r: Value)
        ensures
            r == json_object(self.entries()),
    {
        let mut payload = new_object();
        object_insert(&mut payload, "id".to_owned(), string_value(self.id.clone()));
        object_insert(&mut payload, "content".to_owned(), string_value(self.content.clone()));
        insert_value(&mut payload, "metadata", &self.metadata);
        object_value(payload)
    }
}

/// A change to a document.
#[derive(Debug, Clone)]
pub struct LLMDocumentUpdate {
    pub content: Option<String>,
    pub metadata: Option<Value>,
}

impl LLMDocumentUpdate {
    /// The entries of the JSON form: the parts that are given.
    pub open spec fn entries(&self) -> Map<Seq<char>, Value> {
        with_value(
            with_text(no_entries(), "content"@, text_of(self.content)),
            "metadata"@,
            self.metadata,
        )
    }

    /// The JSON form: an object with the parts that are given.
    pub fn to_json(&self) -> (r: Value)
        ensures
            r == json_object(self.entries()),
    {
        let mut payload = new_object();
        insert_text(&mut payload, "content", &self.content);
        insert_value(&mut payload, "metadata", &self.metadata);
        object_value(payload)
    }
}

/// How a collection of vectors is laid out.
#[derive(Debug, Clone, Default)]
pub struct VectorCollectionConfig {
    pub dimension: Option<i32>,
    pub distance: Option<String>,
    pub options: Option<Value>,
}

impl VectorCollectionConfig {
    /// The entries of the JSON form: the parts that are given.
    pub open spec fn entries(&self) -> Map<Seq<char>, Value> {
        with_value(
            with_text(
                with_value(no_entries(), "dimension"@, integer_of(self.dimension)),
                "distance"@,
                text_of(self.distance),
            ),
            "options"@,
            self.options,
        )
    }

    /// The JSON form: an object with the parts that are given.
    pub fn to_json(&self) -> (r: Value)
        ensures
            r == json_object(self.entries()),
    {
        let mut payload = new_object();
        insert_integer(&mut payload, "dimension", self.dimension);
        insert_text(&mut payload, "distance", &self.distance);
        insert_value(&mut payload, "options", &self.options);
        object_value(payload)
    }
}

/// A query over the documents of a collection.
#[derive(Debug, Clone, Default)]
pub struct LLMQueryOptions {
    pub query: String,
    pub top_k: Option<i32>,
    pub filter: Option<Value>,
    pub include_document: Option<bool>,
}

impl LLMQueryOptions {
    /// The entries of the JSON form: the query, and the parts that are given.
    pub open spec fn entries(&self) -> Map<Seq<char>, Value> {
        with_value(
            with_value(
                with_value(
                    no_entries().insert("query"@, json_string(self.query@)),
                    "topK"@,
                    integer_of(self.top_k),
                ),
                "filter"@,
                self.filter,
            ),
            "includeDocument"@,
            bool_of(self.include_document),
        )
    }

    /// The JSON form: an object with the query, and the parts that are given.
    pub fn to_json(&self) -> (r: Value)
        ensures
            r == json_object(self.entries()),
    {
        let mut payload = new_object();
        object_insert(&mut payload, "query".to_owned(), string_value(self.query.clone()));
        insert_integer(&mut payload, "topK", self.top_k);
        insert_value(&mut payload, "filter", &self.filter);
        insert_bool(&mut payload, "includeDocument", self.include_document);
        object_value(payload)
    }
}

} // verus!
