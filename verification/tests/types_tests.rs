use bosbase::client::normalize_base_url;
use bosbase::client::BosBase;
use bosbase::realtime::record_topic;
use bosbase::realtime::stream_request;
use bosbase::realtime::ResubscribeRequest;
use bosbase::types::LLMDocument;
use bosbase::types::LLMDocumentUpdate;
use bosbase::types::LLMQueryOptions;
use bosbase::types::VectorCollectionConfig;
use bosbase::types::LangChaingoCompletionMessage;
use bosbase::types::LangChaingoModelConfig;
use bosbase::types::LangChaingoRAGFilters;
use serde_json::Value;

fn json(text: &str) -> Value {
    serde_json::from_str(text).unwrap()
}

fn some(text: &str) -> Option<String> {
    Some(text.to_string())
}

#[test]
fn model_config_lists_given_parts() {
    assert_eq!(LangChaingoModelConfig::default().to_json(), json("{}"));
    let c = LangChaingoModelConfig { provider: some("p"), model: None, api_key: some("k"), base_url: some("u") };
    assert_eq!(c.to_json(), json("{\"provider\":\"p\",\"apiKey\":\"k\",\"baseUrl\":\"u\"}"));
    let m = LangChaingoModelConfig { provider: None, model: some("m"), api_key: None, base_url: None };
    assert_eq!(m.to_json(), json("{\"model\":\"m\"}"));
}

#[test]
fn completion_message_has_content() {
    let m = LangChaingoCompletionMessage { content: "hi".to_string(), role: None };
    assert_eq!(m.to_json(), json("{\"content\":\"hi\"}"));
    let r = LangChaingoCompletionMessage { content: "".to_string(), role: some("user") };
    assert_eq!(r.to_json(), json("{\"content\":\"\",\"role\":\"user\"}"));
}

#[test]
fn rag_filters_as_objects() {
    assert_eq!(LangChaingoRAGFilters::default().to_json(), json("{}"));
    let f = LangChaingoRAGFilters {
        where_: Some(vec![("a".to_string(), "1".to_string()), ("a".to_string(), "2".to_string())]),
        where_document: Some(vec![]),
    };
    assert_eq!(f.to_json(), json("{\"where\":{\"a\":\"2\"},\"whereDocument\":{}}"));
}

#[test]
fn documents() {
    let d = LLMDocument { id: "1".to_string(), content: "c".to_string(), metadata: None };
    assert_eq!(d.to_json(), json("{\"id\":\"1\",\"content\":\"c\"}"));
    let e = LLMDocument { id: "1".to_string(), content: "c".to_string(), metadata: Some(json("{\"k\":[1]}")) };
    assert_eq!(e.to_json(), json("{\"id\":\"1\",\"content\":\"c\",\"metadata\":{\"k\":[1]}}"));
    let u = LLMDocumentUpdate { content: None, metadata: Some(Value::Null) };
    assert_eq!(u.to_json(), json("{\"metadata\":null}"));
    let v = LLMDocumentUpdate { content: some("x"), metadata: None };
    assert_eq!(v.to_json(), json("{\"content\":\"x\"}"));
}

#[test]
fn collection_config_and_query_options() {
    assert_eq!(VectorCollectionConfig::default().to_json(), json("{}"));
    let c = VectorCollectionConfig { dimension: Some(-3), distance: some("cosine"), options: Some(json("[1]")) };
    assert_eq!(c.to_json(), json("{\"dimension\":-3,\"distance\":\"cosine\",\"options\":[1]}"));
    let max = VectorCollectionConfig { dimension: Some(i32::MAX), distance: None, options: None };
    assert_eq!(max.to_json(), json("{\"dimension\":2147483647}"));
    assert_eq!(LLMQueryOptions::default().to_json(), json("{\"query\":\"\"}"));
    let q = LLMQueryOptions { query: "q".to_string(), top_k: Some(5), filter: Some(Value::Null), include_document: Some(false) };
    assert_eq!(q.to_json(), json("{\"query\":\"q\",\"topK\":5,\"filter\":null,\"includeDocument\":false}"));
    let t = LLMQueryOptions { query: "q".to_string(), top_k: None, filter: None, include_document: Some(true) };
    assert_eq!(t.to_json(), json("{\"query\":\"q\",\"includeDocument\":true}"));
}

#[test]
fn base_url_is_normalized() {
    assert_eq!(normalize_base_url(""), "/");
    assert_eq!(normalize_base_url("http://h"), "http://h");
    assert_eq!(normalize_base_url("http://h///"), "http://h");
    assert_eq!(normalize_base_url("/"), "");
    assert_eq!(normalize_base_url("a/b/"), "a/b");
}

#[test]
fn client_settings() {
    let plain = BosBase::new("http://h//".to_string());
    assert_eq!(plain.base_url(), "http://h");
    assert_eq!(plain.lang(), "en-US");
    assert_eq!(plain.timeout_ms(), 30_000);
    let set = BosBase::with_options(String::new(), Some("de".to_string()), Some(5));
    assert_eq!(set.base_url(), "/");
    assert_eq!(set.lang(), "de");
    assert_eq!(set.timeout_ms(), 5);
    assert_eq!(plain.build_url("/api/x", &vec![("a".to_string(), json("1"))]), "http://h/api/x?a=1");
    assert_eq!(plain.filter("a = {:a}", &vec![("a".to_string(), json("\"x\""))]), "a = 'x'");
    assert_eq!(
        plain.get_file_url(&json("{\"id\":\"r\",\"collectionId\":\"c\"}"), "f.png", None, None, None, vec![]),
        "http://h/api/files/c/r/f.png"
    );
    assert_eq!(bosbase::client::USER_AGENT, "bosbase-rust-sdk/0.1.0");
}

#[test]
fn record_topic_joins_collection_and_topic() {
    assert_eq!(record_topic("posts", "*").unwrap(), "posts/*");
    assert_eq!(record_topic("", "x").unwrap(), "/x");
    let err = record_topic("posts", "").unwrap_err();
    assert_eq!(err.status, 400);
    assert_eq!(err.response, json("{\"message\":\"topic must be set\"}"));
}

#[test]
fn stream_request_exact() {
    let plain = stream_request("http://h", "en-US", "agent/1", None);
    assert_eq!(plain.url, "http://h/api/realtime");
    assert_eq!(
        plain.headers,
        vec![
            ("Accept".to_string(), "text/event-stream".to_string()),
            ("Cache-Control".to_string(), "no-store".to_string()),
            ("Accept-Language".to_string(), "en-US".to_string()),
            ("User-Agent".to_string(), "agent/1".to_string()),
        ]
    );
    let authed = stream_request("http://h/", "de", "a", Some("tok"));
    assert_eq!(authed.url, "http://h/api/realtime");
    assert_eq!(authed.headers.len(), 5);
    assert_eq!(authed.headers[4], ("Authorization".to_string(), "tok".to_string()));
}

#[test]
fn resubscription_body_exact() {
    let req = ResubscribeRequest {
        client_id: "abc".to_string(),
        subscriptions: vec!["t".to_string(), "u?options=x".to_string()],
    };
    assert_eq!(req.body(), json("{\"clientId\":\"abc\",\"subscriptions\":[\"t\",\"u?options=x\"]}"));
    let opts = req.to_send_options();
    assert_eq!(opts.method, "POST");
    assert_eq!(opts.body, req.body());
    assert!(opts.headers.is_empty() && opts.query.is_empty() && opts.files.is_empty());
    assert!(opts.timeout.is_none());
    assert_eq!(bosbase::realtime::REALTIME_PATH, "/api/realtime");
    let none = ResubscribeRequest { client_id: String::new(), subscriptions: vec![] };
    assert_eq!(none.body(), json("{\"clientId\":\"\",\"subscriptions\":[]}"));
}
